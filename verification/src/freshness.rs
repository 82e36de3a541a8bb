//! Catalog freshness: when a listing has become too old.
//!
//! A hint can only shorten the age the operator allows, never extend it, and is
//! clamped from below so that a hostile one cannot force a redial storm. The
//! listing is only as fresh as its stalest lane. Disconnected and tripped
//! upstreams are recovery's business and never due for a refresh.

use vstd::prelude::*;

use crate::clock::{Duration, Instant, NANOS_PER_MILLI};
use crate::entry::UpstreamEntry;
use crate::lane::{BreakerState, Connection, LaneModel, Lanes};
use crate::reconnect::{lemma_jitter_bounded, ReconnectState};
use crate::redial::CatalogRefreshReport;

verus! {

/// Why a scheduled catalog refresh became due.
#[derive(Clone, Copy, Debug, PartialEq, Eq, Structural)]
pub enum CatalogFreshnessTrigger {
    /// The upstream gave a hint whose clamped deadline has passed.
    TtlHint,
    /// The upstream gave no hint and reached the operator's maximum age.
    UnhintedFallback,
}

impl CatalogFreshnessTrigger {
    pub open spec fn spec_as_str(self) -> Seq<char> {
        match self {
            CatalogFreshnessTrigger::TtlHint => "ttl_hint"@,
            CatalogFreshnessTrigger::UnhintedFallback => "unhinted_fallback"@,
        }
    }

    /// Stable value for logs and attribution.
    pub fn as_str(self) -> (r: &'static str)
        ensures
            r@ == self.spec_as_str(),
    {
        match self {
            CatalogFreshnessTrigger::TtlHint => "ttl_hint",
            CatalogFreshnessTrigger::UnhintedFallback => "unhinted_fallback",
        }
    }
}

/// Outcome of one scheduled catalog refresh attempt.
#[derive(Debug, PartialEq, Eq)]
pub enum ScheduledCatalogRefresh {
    /// The upstream was still due; the refresh ran.
    Refreshed { report: CatalogRefreshReport, trigger: CatalogFreshnessTrigger },
    /// The upstream was no longer due; nothing was sent.
    NotDue,
    /// The server is not registered.
    Unknown,
}

/// When a listing becomes too old, and why.
#[derive(Clone, Copy, Debug, PartialEq, Eq, Structural)]
pub struct CatalogFreshnessDeadline {
    pub at: Instant,
    pub trigger: CatalogFreshnessTrigger,
}

/// The age at which a hinted listing is too old, before jitter.
pub open spec fn clamped_hint(ttl_ms: u64, floor: Duration, ceiling: Duration) -> Duration {
    let hint = ttl_ms * NANOS_PER_MILLI;
    if hint < floor.nanos {
        floor
    } else if hint > ceiling.nanos {
        ceiling
    } else {
        Duration { nanos: hint as u128 }
    }
}

/// The age at which a lane's listing is too old, before jitter.
pub open spec fn effective_ttl(conn: LaneModel, floor: Duration, ceiling: Duration) -> Duration {
    match conn.ttl_hint_ms {
        Some(ttl_ms) => clamped_hint(ttl_ms, floor, ceiling),
        None => ceiling,
    }
}

/// The deadline of one lane; a lane that is down has none, nor has one whose
/// deadline lies beyond the clock.
pub open spec fn lane_deadline(
    state: ReconnectState,
    lane: Option<LaneModel>,
    floor: Duration,
    ceiling: Duration,
) -> Option<CatalogFreshnessDeadline> {
    match lane {
        Some(conn) => {
            let age = effective_ttl(conn, floor, ceiling);
            let ttl = if floor.nanos == 0 {
                age
            } else {
                state.spec_jitter_catalog_interval(floor, age)
            };
            match conn.dialed_at.spec_checked_add(ttl) {
                Some(at) => Some(
                    CatalogFreshnessDeadline {
                        at,
                        trigger: match conn.ttl_hint_ms {
                            Some(_) => CatalogFreshnessTrigger::TtlHint,
                            None => CatalogFreshnessTrigger::UnhintedFallback,
                        },
                    },
                ),
                None => None,
            }
        },
        None => None,
    }
}

/// The deadline is the earliest one of the lanes; a hint is the reason if any
/// lane due then has one.
pub open spec fn is_earliest(
    state: ReconnectState,
    lanes: Lanes,
    floor: Duration,
    ceiling: Duration,
    deadline: Option<CatalogFreshnessDeadline>,
) -> bool {
    match deadline {
        None => forall|k: int|
            0 <= k < lanes.len() ==> (#[trigger] lane_deadline(state, lanes[k], floor, ceiling))
                is None,
        Some(d) => {
            &&& exists|k: int|
                0 <= k < lanes.len() && #[trigger] lane_deadline(state, lanes[k], floor, ceiling)
                    == Some(d)
            &&& forall|k: int|
                0 <= k < lanes.len() && (#[trigger] lane_deadline(
                    state,
                    lanes[k],
                    floor,
                    ceiling,
                )) is Some ==> {
                    let other = lane_deadline(state, lanes[k], floor, ceiling)->0;
                    &&& d.at.nanos <= other.at.nanos
                    &&& other.at == d.at && other.trigger == CatalogFreshnessTrigger::TtlHint
                        ==> d.trigger == CatalogFreshnessTrigger::TtlHint
                }
        },
    }
}

/// The bounds can clamp every hint of the connected lanes: bounds that cross
/// clamp none.
pub open spec fn hints_clampable(lanes: Lanes, floor: Duration, ceiling: Duration) -> bool {
    floor.nanos <= ceiling.nanos || forall|k: int|
        0 <= k < lanes.len() && (#[trigger] lanes[k]) is Some ==> lanes[k]->0.ttl_hint_ms is None
}

/// The age of the entry's listing can be judged against the bounds.
pub open spec fn refresh_decidable(
    entry: UpstreamEntry,
    floor: Duration,
    ceiling: Duration,
) -> bool {
    entry.removed || entry.breaker == BreakerState::Open || hints_clampable(
        entry.lanes.deep_view(),
        floor,
        ceiling,
    )
}

/// Test whether the age of the entry's listing can be judged.
pub fn refresh_is_decidable(entry: &UpstreamEntry, floor: Duration, ceiling: Duration) -> (b: bool)
    ensures
        b == refresh_decidable(*entry, floor, ceiling),
{
    if entry.removed || entry.breaker == BreakerState::Open || floor.nanos <= ceiling.nanos {
        return true;
    }
    let mut k: usize = 0;
    while k < entry.lanes.len()
        invariant
            k <= entry.lanes.len(),
            floor.nanos > ceiling.nanos,
            !entry.removed,
            entry.breaker != BreakerState::Open,
            forall|j: int|
                0 <= j < k && (#[trigger] entry.lanes.deep_view()[j]) is Some
                    ==> entry.lanes.deep_view()[j]->0.ttl_hint_ms is None,
        decreases entry.lanes.len() - k,
    {
        if let Some(conn) = &entry.lanes[k] {
            proof {
                assert(entry.lanes.deep_view()[k as int] == Some(conn.deep_view()));
            }
            if conn.ttl_hint_ms.is_some() {
                return false;
            }
        }
        k = k + 1;
    }
    true
}

fn deadline_of_lane(
    state: &ReconnectState,
    conn: &Connection,
    floor: Duration,
    ceiling: Duration,
) -> (r: Option<CatalogFreshnessDeadline>)
    requires
        floor.nanos <= ceiling.nanos || conn.ttl_hint_ms is None,
    ensures
        r == lane_deadline(*state, Some(conn.deep_view()), floor, ceiling),
{
    let (age, trigger) = match conn.ttl_hint_ms {
        Some(ttl_ms) => {
            let hint = Duration::from_millis(ttl_ms);
            let clamped = if hint.nanos < floor.nanos {
                floor
            } else if hint.nanos > ceiling.nanos {
                ceiling
            } else {
                hint
            };
            (clamped, CatalogFreshnessTrigger::TtlHint)
        },
        None => (ceiling, CatalogFreshnessTrigger::UnhintedFallback),
    };
    let ttl = if floor.is_zero() {
        age
    } else {
        state.jitter_catalog_interval(floor, age)
    };
    match conn.dialed_at.checked_add(ttl) {
        Some(at) => Some(CatalogFreshnessDeadline { at, trigger }),
        None => None,
    }
}

/// Earliest deadline across the connected lanes.
pub fn catalog_freshness_deadline(
    state: &ReconnectState,
    lanes: &Vec<Option<Connection>>,
    floor: Duration,
    ceiling: Duration,
) -> (r: Option<CatalogFreshnessDeadline>)
    requires
        hints_clampable(lanes.deep_view(), floor, ceiling),
    ensures
        is_earliest(*state, lanes.deep_view(), floor, ceiling, r),
{
    let ghost all = lanes.deep_view();
    let mut earliest: Option<CatalogFreshnessDeadline> = None;
    let mut k: usize = 0;
    while k < lanes.len()
        invariant
            k <= lanes.len(),
            hints_clampable(all, floor, ceiling),
            all == lanes.deep_view(),
            match earliest {
                None => forall|j: int|
                    0 <= j < k ==> (#[trigger] lane_deadline(*state, all[j], floor, ceiling))
                        is None,
                Some(d) => {
                    &&& exists|j: int|
                        0 <= j < k && #[trigger] lane_deadline(*state, all[j], floor, ceiling)
                            == Some(d)
                    &&& forall|j: int|
                        0 <= j < k && (#[trigger] lane_deadline(*state, all[j], floor, ceiling))
                            is Some ==> {
                            let other = lane_deadline(*state, all[j], floor, ceiling)->0;
                            &&& d.at.nanos <= other.at.nanos
                            &&& other.at == d.at && other.trigger
                                == CatalogFreshnessTrigger::TtlHint ==> d.trigger
                                == CatalogFreshnessTrigger::TtlHint
                        }
                },
            },
        decreases lanes.len() - k,
    {
        if let Some(conn) = &lanes[k] {
            proof {
                assert(all[k as int] == Some(conn.deep_view()));
            }
            if let Some(candidate) = deadline_of_lane(state, conn, floor, ceiling) {
                let stays = match earliest {
                    Some(current) => current.at.nanos < candidate.at.nanos || (current.at.nanos
                        == candidate.at.nanos && current.trigger
                        == CatalogFreshnessTrigger::TtlHint),
                    None => false,
                };
                if !stays {
                    earliest = Some(candidate);
                    proof {
                        assert(lane_deadline(*state, all[k as int], floor, ceiling) == Some(
                            candidate,
                        ));
                    }
                }
            }
        }
        k = k + 1;
    }
    earliest
}

/// Whether an entry is due for a refresh, and why: it is not removed, its
/// breaker is not open, and a connected lane's deadline has passed.
pub fn catalog_refresh_trigger_if_due(
    entry: &UpstreamEntry,
    floor: Duration,
    ceiling: Duration,
    now: Instant,
) -> (r: Option<CatalogFreshnessTrigger>)
    requires
        refresh_decidable(*entry, floor, ceiling),
    ensures
        r is Some <==> refresh_due(*entry, floor, ceiling, now),
        r is Some ==> exists|d: CatalogFreshnessDeadline|
            d.trigger == r->0 && d.at.nanos <= now.nanos && #[trigger] is_earliest(
                entry.reconnect,
                entry.lanes.deep_view(),
                floor,
                ceiling,
                Some(d),
            ),
{
    if entry.removed || entry.breaker == BreakerState::Open {
        return None;
    }
    let deadline = catalog_freshness_deadline(&entry.reconnect, &entry.lanes, floor, ceiling);
    match deadline {
        Some(d) => {
            if d.at.nanos <= now.nanos {
                proof {
                    let k = choose|k: int|
                        0 <= k < entry.lanes.deep_view().len() && #[trigger] lane_deadline(
                            entry.reconnect,
                            entry.lanes.deep_view()[k],
                            floor,
                            ceiling,
                        ) == Some(d);
                    assert(lane_due(
                        entry.reconnect,
                        entry.lanes.deep_view()[k],
                        floor,
                        ceiling,
                        now,
                    ));
                }
                Some(d.trigger)
            } else {
                None
            }
        },
        None => None,
    }
}

/// The deadline of a lane has passed.
pub open spec fn lane_due(
    state: ReconnectState,
    lane: Option<LaneModel>,
    floor: Duration,
    ceiling: Duration,
    now: Instant,
) -> bool {
    lane_deadline(state, lane, floor, ceiling) is Some && lane_deadline(
        state,
        lane,
        floor,
        ceiling,
    )->0.at.nanos <= now.nanos
}

/// The entry is due for a refresh.
pub open spec fn refresh_due(
    entry: UpstreamEntry,
    floor: Duration,
    ceiling: Duration,
    now: Instant,
) -> bool {
    &&& !entry.removed
    &&& entry.breaker != BreakerState::Open
    &&& exists|k: int|
        0 <= k < entry.lanes.deep_view().len() && #[trigger] lane_due(
            entry.reconnect,
            entry.lanes.deep_view()[k],
            floor,
            ceiling,
            now,
        )
}

/// A hint can only shorten: no listing is used longer than the ceiling, hint or
/// not, no hinted one longer than its hint where that exceeds the floor, and
/// none is refreshed before the floor has passed.
pub proof fn hints_only_shorten(
    state: ReconnectState,
    conn: LaneModel,
    floor: Duration,
    ceiling: Duration,
)
    requires
        floor.nanos <= ceiling.nanos,
        lane_deadline(state, Some(conn), floor, ceiling) is Some,
    ensures
        ({
            let at = lane_deadline(state, Some(conn), floor, ceiling)->0.at;
            &&& at.nanos <= conn.dialed_at.nanos + ceiling.nanos
            &&& at.nanos >= conn.dialed_at.nanos + floor.nanos
            &&& conn.ttl_hint_ms is Some && conn.ttl_hint_ms->0 * NANOS_PER_MILLI >= floor.nanos
                ==> at.nanos <= conn.dialed_at.nanos + conn.ttl_hint_ms->0 * NANOS_PER_MILLI
        }),
{
    let age = effective_ttl(conn, floor, ceiling);
    let slack = if age.nanos >= floor.nanos {
        (age.nanos - floor.nanos) as u128
    } else {
        0
    };
    let tenth = age.nanos / 10;
    let advance = if slack <= tenth {
        slack
    } else {
        tenth
    };
    lemma_jitter_bounded(Duration { nanos: advance }, state.policy.seed, u64::MAX);
}

/// A hint counts as it is given within the bounds, as the floor below them and as
/// the ceiling above them; a lane without one is good for the ceiling.
pub proof fn hints_count_within_their_bounds(
    conn: LaneModel,
    floor: Duration,
    ceiling: Duration,
)
    requires
        floor.nanos <= ceiling.nanos,
    ensures
        conn.ttl_hint_ms is None ==> effective_ttl(conn, floor, ceiling) == ceiling,
        conn.ttl_hint_ms is Some ==> ({
            let hint = conn.ttl_hint_ms->0 * NANOS_PER_MILLI;
            let ttl = effective_ttl(conn, floor, ceiling);
            &&& hint <= floor.nanos ==> ttl == floor
            &&& hint >= ceiling.nanos ==> ttl == ceiling
            &&& floor.nanos <= hint <= ceiling.nanos ==> ttl.nanos == hint
        }),
{
}

/// A connected lane is due for a refresh one jittered age after it was dialed,
/// its own hint being the reason where it gave one; a lane that is down never is.
pub proof fn lanes_are_due_after_their_age(
    state: ReconnectState,
    conn: LaneModel,
    floor: Duration,
    ceiling: Duration,
)
    ensures
        lane_deadline(state, None, floor, ceiling) is None,
        ({
            let age = effective_ttl(conn, floor, ceiling);
            let wait = if floor.nanos == 0 {
                age.nanos
            } else {
                state.spec_jitter_catalog_interval(floor, age).nanos
            };
            let deadline = lane_deadline(state, Some(conn), floor, ceiling);
            &&& deadline is Some <==> conn.dialed_at.nanos + wait <= u128::MAX
            &&& deadline is Some ==> deadline->0.at.nanos == conn.dialed_at.nanos + wait
            &&& deadline is Some ==> (deadline->0.trigger == CatalogFreshnessTrigger::TtlHint
                <==> conn.ttl_hint_ms is Some)
            &&& deadline is Some ==> (deadline->0.trigger
                == CatalogFreshnessTrigger::UnhintedFallback <==> conn.ttl_hint_ms is None)
        }),
{
}

/// The deadline of an upstream is the first one of its lanes, and a hint is told
/// as its reason before the fallback where both come at once.
pub proof fn the_first_lane_sets_the_deadline(
    state: ReconnectState,
    lanes: Lanes,
    floor: Duration,
    ceiling: Duration,
    deadline: Option<CatalogFreshnessDeadline>,
    k: int,
)
    requires
        is_earliest(state, lanes, floor, ceiling, deadline),
        0 <= k < lanes.len(),
        lane_deadline(state, lanes[k], floor, ceiling) is Some,
    ensures
        deadline is Some,
        deadline->0.at.nanos <= lane_deadline(state, lanes[k], floor, ceiling)->0.at.nanos,
        deadline->0.at == lane_deadline(state, lanes[k], floor, ceiling)->0.at && lanes[k] is Some
            && lanes[k]->0.ttl_hint_ms is Some ==> deadline->0.trigger
            == CatalogFreshnessTrigger::TtlHint,
        exists|j: int|
            0 <= j < lanes.len() && #[trigger] lane_deadline(state, lanes[j], floor, ceiling)
                == deadline,
{
    assert(lane_deadline(state, lanes[k], floor, ceiling) is Some);
}

/// Without a lane that will ever be due there is no deadline.
pub proof fn no_due_lane_sets_no_deadline(
    state: ReconnectState,
    lanes: Lanes,
    floor: Duration,
    ceiling: Duration,
    deadline: Option<CatalogFreshnessDeadline>,
)
    requires
        is_earliest(state, lanes, floor, ceiling, deadline),
        forall|k: int| 0 <= k < lanes.len() ==> (#[trigger] lanes[k]) is None,
    ensures
        deadline is None,
{
    if deadline is Some {
        let j = choose|j: int|
            0 <= j < lanes.len() && #[trigger] lane_deadline(state, lanes[j], floor, ceiling)
                == deadline;
        assert(lanes[j] is None);
    }
}

/// A refresh is due exactly where the upstream is not being removed, its breaker
/// is not open, and the moment of one of its lanes has come.
pub proof fn a_refresh_is_due_with_its_first_lane(
    entry: UpstreamEntry,
    floor: Duration,
    ceiling: Duration,
    now: Instant,
    k: int,
)
    requires
        0 <= k < entry.lanes.deep_view().len(),
    ensures
        entry.removed || entry.breaker == BreakerState::Open ==> !refresh_due(
            entry,
            floor,
            ceiling,
            now,
        ),
        ({
            let deadline = lane_deadline(
                entry.reconnect,
                entry.lanes.deep_view()[k],
                floor,
                ceiling,
            );
            !entry.removed && entry.breaker != BreakerState::Open && deadline is Some
                && deadline->0.at.nanos <= now.nanos ==> refresh_due(entry, floor, ceiling, now)
        }),
        (forall|j: int|
            0 <= j < entry.lanes.deep_view().len() ==> {
                let deadline = #[trigger] lane_deadline(
                    entry.reconnect,
                    entry.lanes.deep_view()[j],
                    floor,
                    ceiling,
                );
                deadline is None || deadline->0.at.nanos > now.nanos
            }) ==> !refresh_due(entry, floor, ceiling, now),
{
    let lanes = entry.lanes.deep_view();
    let deadline = lane_deadline(entry.reconnect, lanes[k], floor, ceiling);
    if deadline is Some && deadline->0.at.nanos <= now.nanos {
        assert(lane_due(entry.reconnect, lanes[k], floor, ceiling, now));
    }
    if refresh_due(entry, floor, ceiling, now) {
        let j = choose|j: int|
            0 <= j < lanes.len() && #[trigger] lane_due(
                entry.reconnect,
                lanes[j],
                floor,
                ceiling,
                now,
            );
        assert(lane_deadline(entry.reconnect, lanes[j], floor, ceiling) is Some);
    }
}

/// A refresh can be decided wherever the bounds are in order, and wherever it is
/// ruled out without them.
pub proof fn ordered_bounds_decide_a_refresh(
    entry: UpstreamEntry,
    floor: Duration,
    ceiling: Duration,
)
    ensures
        floor.nanos <= ceiling.nanos ==> refresh_decidable(entry, floor, ceiling),
        entry.removed ==> refresh_decidable(entry, floor, ceiling),
        entry.breaker == BreakerState::Open ==> refresh_decidable(entry, floor, ceiling),
        floor.nanos <= ceiling.nanos ==> hints_clampable(entry.lanes.deep_view(), floor, ceiling),
{
}

/// Each trigger of a refresh has its own word.
pub proof fn words_tell_triggers_apart()
    ensures
        CatalogFreshnessTrigger::TtlHint.spec_as_str() == "ttl_hint"@,
        CatalogFreshnessTrigger::UnhintedFallback.spec_as_str() == "unhinted_fallback"@,
{
}

} // verus!
